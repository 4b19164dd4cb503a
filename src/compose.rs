use vstd::prelude::*;
use crate::matrix::{is_matrix, matrix_mul, num_mat, num_seq, product_fits, product_of, transpose, transpose_of};
use crate::neuron::Neuron;

verus! {

/// The unit that runs `g` and feeds its output to `f`. Its parameters are
/// those of `g` followed by those of `f`.
pub struct Composition<N1: Neuron, N2: Neuron> {
    f: N2,
    g: N1,
}

/// Entries `lo` to `hi` (exclusive) of `v`.
pub(crate) fn param_block(v: &Vec<i64>, lo: usize, hi: usize) -> (r: Vec<i64>)
    requires
        lo <= hi <= v.len(),
    ensures
        num_seq(r@) == num_seq(v@).subrange(lo as int, hi as int),
        r.len() == hi - lo,
{
    let mut r: Vec<i64> = Vec::new();
    let mut k: usize = lo;
    while k < hi
        invariant
            lo <= k <= hi <= v.len(),
            r.len() == k - lo,
            forall|j: int| 0 <= j < r.len() ==> #[trigger] r@[j] == v@[lo + j],
        decreases hi - k,
    {
        r.push(v[k]);
        k = k + 1;
    }
    assert(num_seq(r@) =~= num_seq(v@).subrange(lo as int, hi as int));
    r
}

impl<N1: Neuron, N2: Neuron> Composition<N1, N2> {
    /// The composition that applies `g` first and `f` to its result.
    pub fn new(g: N1, f: N2) -> (r: Self)
        requires
            g.wf(),
            f.wf(),
            g.output_dim() == f.input_dim(),
            g.param_dim() + f.param_dim() <= usize::MAX,
        ensures
            r.inner() == g,
            r.outer() == f,
            r.wf(),
    {
        Composition { f, g }
    }

    /// The unit applied first.
    pub closed spec fn inner(&self) -> N1 {
        self.g
    }

    /// The unit applied to the output of the first.
    pub closed spec fn outer(&self) -> N2 {
        self.f
    }

    /// The parameters that belong to the inner unit.
    pub open spec fn inner_params(&self, params: Seq<int>) -> Seq<int> {
        params.take(self.inner().param_dim() as int)
    }

    /// The parameters that belong to the outer unit.
    pub open spec fn outer_params(&self, params: Seq<int>) -> Seq<int> {
        params.skip(self.inner().param_dim() as int)
    }

    /// The output of the inner unit, which is the input of the outer one.
    pub open spec fn middle(&self, input: Seq<int>, params: Seq<int>) -> Seq<int> {
        self.inner().eval_spec(input, self.inner_params(params))
    }

    /// The derivative of the outer unit at the middle value.
    pub open spec fn outer_derivative(&self, input: Seq<int>, params: Seq<int>) -> Seq<Seq<int>> {
        self.outer().derivative_spec(self.middle(input, params), self.outer_params(params))
    }

    /// Chains the outer derivative through `m`, a matrix with one row per
    /// input (or parameter) of the inner unit and one column per middle value.
    pub open spec fn chained(&self, input: Seq<int>, params: Seq<int>, m: Seq<Seq<int>>, rows: nat) -> Seq<Seq<int>> {
        let o = self.inner().output_dim();
        let o2 = self.outer().output_dim();
        transpose_of(product_of(transpose_of(self.outer_derivative(input, params), o2), transpose_of(m, o), rows), rows)
    }

    /// `chained` stays within `i64` in every product.
    pub open spec fn chained_fits(&self, input: Seq<int>, params: Seq<int>, m: Seq<Seq<int>>, rows: nat) -> bool {
        let o = self.inner().output_dim();
        let o2 = self.outer().output_dim();
        product_fits(transpose_of(self.outer_derivative(input, params), o2), transpose_of(m, o), rows)
    }
}

impl<N1: Neuron, N2: Neuron> Neuron for Composition<N1, N2> {
    open spec fn wf(&self) -> bool {
        &&& self.inner().wf()
        &&& self.outer().wf()
        &&& self.inner().output_dim() == self.outer().input_dim()
        &&& self.inner().param_dim() + self.outer().param_dim() <= usize::MAX
    }

    open spec fn input_dim(&self) -> nat {
        self.inner().input_dim()
    }

    open spec fn output_dim(&self) -> nat {
        self.outer().output_dim()
    }

    open spec fn param_dim(&self) -> nat {
        self.inner().param_dim() + self.outer().param_dim()
    }

    open spec fn eval_spec(&self, input: Seq<int>, params: Seq<int>) -> Seq<int> {
        self.outer().eval_spec(self.middle(input, params), self.outer_params(params))
    }

    open spec fn derivative_spec(&self, input: Seq<int>, params: Seq<int>) -> Seq<Seq<int>> {
        let dg = self.inner().derivative_spec(input, self.inner_params(params));
        self.chained(input, params, dg, self.inner().input_dim())
    }

    open spec fn gradient_spec(&self, input: Seq<int>, params: Seq<int>) -> Seq<Seq<int>> {
        let gg = self.inner().gradient_spec(input, self.inner_params(params));
        let gf = self.outer().gradient_spec(self.middle(input, params), self.outer_params(params));
        self.chained(input, params, gg, self.inner().param_dim()) + gf
    }

    open spec fn eval_fits(&self, input: Seq<int>, params: Seq<int>) -> bool {
        &&& self.inner().eval_fits(input, self.inner_params(params))
        &&& self.outer().eval_fits(self.middle(input, params), self.outer_params(params))
    }

    open spec fn derivative_fits(&self, input: Seq<int>, params: Seq<int>) -> bool {
        let dg = self.inner().derivative_spec(input, self.inner_params(params));
        &&& self.inner().eval_fits(input, self.inner_params(params))
        &&& self.outer().derivative_fits(self.middle(input, params), self.outer_params(params))
        &&& self.inner().derivative_fits(input, self.inner_params(params))
        &&& self.chained_fits(input, params, dg, self.inner().input_dim())
    }

    open spec fn gradient_fits(&self, input: Seq<int>, params: Seq<int>) -> bool {
        let gg = self.inner().gradient_spec(input, self.inner_params(params));
        &&& self.inner().eval_fits(input, self.inner_params(params))
        &&& self.outer().derivative_fits(self.middle(input, params), self.outer_params(params))
        &&& self.inner().gradient_fits(input, self.inner_params(params))
        &&& self.chained_fits(input, params, gg, self.inner().param_dim())
        &&& self.outer().gradient_fits(self.middle(input, params), self.outer_params(params))
    }

    proof fn lemma_shapes(&self, input: Seq<int>, params: Seq<int>) {
        let pg = self.inner_params(params);
        let pf = self.outer_params(params);
        self.inner().lemma_shapes(input, pg);
        self.outer().lemma_shapes(self.middle(input, params), pf);
        let gg = self.inner().gradient_spec(input, pg);
        let gf = self.outer().gradient_spec(self.middle(input, params), pf);
        let c = self.chained(input, params, gg, self.inner().param_dim());
        assert forall|k: int| 0 <= k < self.param_dim() implies #[trigger] (c + gf)[k].len() == self.output_dim() by {
            if k >= c.len() {
                assert((c + gf)[k] == gf[k - c.len()]);
            } else {
                assert((c + gf)[k] == c[k]);
            }
        }
    }

    fn input_len(&self) -> (r: usize) {
        self.g.input_len()
    }

    fn output_len(&self) -> (r: usize) {
        self.f.output_len()
    }

    fn param_len(&self) -> (r: usize) {
        self.g.param_len() + self.f.param_len()
    }

    fn eval(&self, input: &Vec<i64>, params: &Vec<i64>) -> (r: Vec<i64>) {
        let n1 = self.g.param_len();
        let lhs = param_block(params, 0, n1);
        let rhs = param_block(params, n1, params.len());
        assert(num_seq(rhs@) =~= self.outer_params(num_seq(params@)));
        let y = self.g.eval(input, &lhs);
        proof {
            self.g.lemma_shapes(num_seq(input@), num_seq(lhs@));
        }
        self.f.eval(&y, &rhs)
    }

    fn derivative(&self, input: &Vec<i64>, params: &Vec<i64>) -> (r: Vec<Vec<i64>>) {
        let n1 = self.g.param_len();
        let lhs = param_block(params, 0, n1);
        let rhs = param_block(params, n1, params.len());
        assert(num_seq(rhs@) =~= self.outer_params(num_seq(params@)));
        let y = self.g.eval(input, &lhs);
        proof {
            self.g.lemma_shapes(num_seq(input@), num_seq(lhs@));
            self.f.lemma_shapes(num_seq(y@), num_seq(rhs@));
        }
        let f_d = self.f.derivative(&y, &rhs);
        let g_d = self.g.derivative(input, &lhs);
        let o = self.g.output_len();
        let o2 = self.f.output_len();
        let ni = self.g.input_len();
        let ft = transpose(&f_d, o2);
        let gt = transpose(&g_d, o);
        let m = matrix_mul(&ft, &gt, ni);
        transpose(&m, ni)
    }

    fn gradient(&self, input: &Vec<i64>, params: &Vec<i64>) -> (r: Vec<Vec<i64>>) {
        let n1 = self.g.param_len();
        let lhs = param_block(params, 0, n1);
        let rhs = param_block(params, n1, params.len());
        assert(num_seq(rhs@) =~= self.outer_params(num_seq(params@)));
        let y = self.g.eval(input, &lhs);
        proof {
            self.g.lemma_shapes(num_seq(input@), num_seq(lhs@));
            self.f.lemma_shapes(num_seq(y@), num_seq(rhs@));
        }
        let f_d = self.f.derivative(&y, &rhs);
        let g_g = self.g.gradient(input, &lhs);
        let o = self.g.output_len();
        let o2 = self.f.output_len();
        let ft = transpose(&f_d, o2);
        let gt = transpose(&g_g, o);
        let m = matrix_mul(&ft, &gt, n1);
        let mut p1 = transpose(&m, n1);
        let mut p2 = self.f.gradient(&y, &rhs);
        let ghost s1 = num_mat(p1@);
        let ghost s2 = num_mat(p2@);
        p1.append(&mut p2);
        assert(num_mat(p1@) =~= s1 + s2);
        p1
    }
}

} // verus!
