use vstd::prelude::*;
use crate::compose::param_block;
use crate::matrix::{num_mat, num_seq};
use crate::neuron::Neuron;

verus! {

/// The unit that runs `left` and `right` on the same input and stacks their
/// outputs, `left`'s first. Its parameters are those of `left` followed by
/// those of `right`.
pub struct Split<N1: Neuron, N2: Neuron> {
    left: N1,
    right: N2,
}

/// A vector of `n` zeros.
pub open spec fn zeros(n: nat) -> Seq<int> {
    Seq::new(n, |j: int| 0int)
}

/// `a` followed by `b`, and optionally padded: `pad_front` zeros before,
/// `pad_back` zeros after.
fn padded_concat(a: &Vec<i64>, b: &Vec<i64>, pad_front: usize, pad_back: usize) -> (r: Vec<i64>)
    ensures
        num_seq(r@) == zeros(pad_front as nat) + num_seq(a@) + num_seq(b@) + zeros(pad_back as nat),
{
    let ghost want = zeros(pad_front as nat) + num_seq(a@) + num_seq(b@) + zeros(pad_back as nat);
    let mut r: Vec<i64> = Vec::new();
    let mut k: usize = 0;
    while k < pad_front
        invariant
            k <= pad_front,
            r.len() == k,
            forall|j: int| 0 <= j < k ==> #[trigger] r@[j] == 0,
        decreases pad_front - k,
    {
        r.push(0);
        k = k + 1;
    }
    let mut k: usize = 0;
    while k < a.len()
        invariant
            k <= a.len(),
            r.len() == pad_front + k,
            forall|j: int| 0 <= j < pad_front ==> #[trigger] r@[j] == 0,
            forall|j: int| 0 <= j < k ==> #[trigger] r@[pad_front + j] == a@[j],
        decreases a.len() - k,
    {
        r.push(a[k]);
        k = k + 1;
    }
    let mut k: usize = 0;
    while k < b.len()
        invariant
            k <= b.len(),
            r.len() == pad_front + a.len() + k,
            forall|j: int| 0 <= j < pad_front ==> #[trigger] r@[j] == 0,
            forall|j: int| 0 <= j < a.len() ==> #[trigger] r@[pad_front + j] == a@[j],
            forall|j: int| 0 <= j < k ==> #[trigger] r@[pad_front + a.len() + j] == b@[j],
        decreases b.len() - k,
    {
        r.push(b[k]);
        k = k + 1;
    }
    let mut k: usize = 0;
    while k < pad_back
        invariant
            k <= pad_back,
            r.len() == pad_front + a.len() + b.len() + k,
            forall|j: int| 0 <= j < pad_front ==> #[trigger] r@[j] == 0,
            forall|j: int| 0 <= j < a.len() ==> #[trigger] r@[pad_front + j] == a@[j],
            forall|j: int| 0 <= j < b.len() ==> #[trigger] r@[pad_front + a.len() + j] == b@[j],
            forall|j: int| 0 <= j < k ==> #[trigger] r@[pad_front + a.len() + b.len() + j] == 0,
        decreases pad_back - k,
    {
        r.push(0);
        k = k + 1;
    }
    assert forall|j: int| 0 <= j < r.len() implies #[trigger] num_seq(r@)[j] == want[j] by {
        if j < pad_front {
        } else if j < pad_front + a.len() {
            assert(r@[pad_front + (j - pad_front)] == a@[j - pad_front]);
        } else if j < pad_front + a.len() + b.len() {
            assert(r@[pad_front + a.len() + (j - pad_front - a.len())] == b@[j - pad_front - a.len()]);
        } else {
            assert(r@[pad_front + a.len() + b.len() + (j - pad_front - a.len() - b.len())] == 0);
        }
    }
    assert(num_seq(r@) =~= want);
    r
}

impl<N1: Neuron, N2: Neuron> Split<N1, N2> {
    /// The unit that runs `left` and `right` side by side on one input.
    pub fn new(left: N1, right: N2) -> (r: Self)
        requires
            left.wf(),
            right.wf(),
            left.input_dim() == right.input_dim(),
            left.output_dim() + right.output_dim() <= usize::MAX,
            left.param_dim() + right.param_dim() <= usize::MAX,
        ensures
            r.left_unit() == left,
            r.right_unit() == right,
            r.wf(),
    {
        Split { left, right }
    }

    pub closed spec fn left_unit(&self) -> N1 {
        self.left
    }

    pub closed spec fn right_unit(&self) -> N2 {
        self.right
    }

    /// The parameters that belong to the left unit.
    pub open spec fn left_params(&self, params: Seq<int>) -> Seq<int> {
        params.take(self.left_unit().param_dim() as int)
    }

    /// The parameters that belong to the right unit.
    pub open spec fn right_params(&self, params: Seq<int>) -> Seq<int> {
        params.skip(self.left_unit().param_dim() as int)
    }
}

impl<N1: Neuron, N2: Neuron> Neuron for Split<N1, N2> {
    open spec fn wf(&self) -> bool {
        &&& self.left_unit().wf()
        &&& self.right_unit().wf()
        &&& self.left_unit().input_dim() == self.right_unit().input_dim()
        &&& self.left_unit().output_dim() + self.right_unit().output_dim() <= usize::MAX
        &&& self.left_unit().param_dim() + self.right_unit().param_dim() <= usize::MAX
    }

    open spec fn input_dim(&self) -> nat {
        self.left_unit().input_dim()
    }

    open spec fn output_dim(&self) -> nat {
        self.left_unit().output_dim() + self.right_unit().output_dim()
    }

    open spec fn param_dim(&self) -> nat {
        self.left_unit().param_dim() + self.right_unit().param_dim()
    }

    open spec fn eval_spec(&self, input: Seq<int>, params: Seq<int>) -> Seq<int> {
        self.left_unit().eval_spec(input, self.left_params(params)) + self.right_unit().eval_spec(
            input,
            self.right_params(params),
        )
    }

    open spec fn derivative_spec(&self, input: Seq<int>, params: Seq<int>) -> Seq<Seq<int>> {
        let dl = self.left_unit().derivative_spec(input, self.left_params(params));
        let dr = self.right_unit().derivative_spec(input, self.right_params(params));
        Seq::new(self.input_dim(), |i: int| dl[i] + dr[i])
    }

    open spec fn gradient_spec(&self, input: Seq<int>, params: Seq<int>) -> Seq<Seq<int>> {
        let gl = self.left_unit().gradient_spec(input, self.left_params(params));
        let gr = self.right_unit().gradient_spec(input, self.right_params(params));
        Seq::new(self.left_unit().param_dim(), |k: int| gl[k] + zeros(self.right_unit().output_dim()))
            + Seq::new(self.right_unit().param_dim(), |k: int| zeros(self.left_unit().output_dim()) + gr[k])
    }

    open spec fn eval_fits(&self, input: Seq<int>, params: Seq<int>) -> bool {
        &&& self.left_unit().eval_fits(input, self.left_params(params))
        &&& self.right_unit().eval_fits(input, self.right_params(params))
    }

    open spec fn derivative_fits(&self, input: Seq<int>, params: Seq<int>) -> bool {
        &&& self.left_unit().derivative_fits(input, self.left_params(params))
        &&& self.right_unit().derivative_fits(input, self.right_params(params))
    }

    open spec fn gradient_fits(&self, input: Seq<int>, params: Seq<int>) -> bool {
        &&& self.left_unit().gradient_fits(input, self.left_params(params))
        &&& self.right_unit().gradient_fits(input, self.right_params(params))
    }

    proof fn lemma_shapes(&self, input: Seq<int>, params: Seq<int>) {
        self.left_unit().lemma_shapes(input, self.left_params(params));
        self.right_unit().lemma_shapes(input, self.right_params(params));
        let g = self.gradient_spec(input, params);
        let n1 = self.left_unit().param_dim();
        assert forall|k: int| 0 <= k < self.param_dim() implies #[trigger] g[k].len() == self.output_dim() by {
            let gl = self.left_unit().gradient_spec(input, self.left_params(params));
            let gr = self.right_unit().gradient_spec(input, self.right_params(params));
            let a = Seq::new(n1, |k: int| gl[k] + zeros(self.right_unit().output_dim()));
            let b = Seq::new(self.right_unit().param_dim(), |k: int| zeros(self.left_unit().output_dim()) + gr[k]);
            if k < n1 {
                assert((a + b)[k] == a[k]);
            } else {
                assert((a + b)[k] == b[k - n1]);
            }
        }
    }

    fn input_len(&self) -> (r: usize) {
        self.left.input_len()
    }

    fn output_len(&self) -> (r: usize) {
        self.left.output_len() + self.right.output_len()
    }

    fn param_len(&self) -> (r: usize) {
        self.left.param_len() + self.right.param_len()
    }

    fn eval(&self, input: &Vec<i64>, params: &Vec<i64>) -> (r: Vec<i64>) {
        let n1 = self.left.param_len();
        let lhs = param_block(params, 0, n1);
        let rhs = param_block(params, n1, params.len());
        assert(num_seq(rhs@) =~= self.right_params(num_seq(params@)));
        let a = self.left.eval(input, &lhs);
        let b = self.right.eval(input, &rhs);
        let r = padded_concat(&a, &b, 0, 0);
        assert(num_seq(r@) =~= num_seq(a@) + num_seq(b@));
        r
    }

    fn derivative(&self, input: &Vec<i64>, params: &Vec<i64>) -> (r: Vec<Vec<i64>>) {
        let n1 = self.left.param_len();
        let lhs = param_block(params, 0, n1);
        let rhs = param_block(params, n1, params.len());
        assert(num_seq(rhs@) =~= self.right_params(num_seq(params@)));
        let dl = self.left.derivative(input, &lhs);
        let dr = self.right.derivative(input, &rhs);
        proof {
            self.left.lemma_shapes(num_seq(input@), num_seq(lhs@));
            self.right.lemma_shapes(num_seq(input@), num_seq(rhs@));
        }
        let ghost want = self.derivative_spec(num_seq(input@), num_seq(params@));
        let mut out: Vec<Vec<i64>> = Vec::new();
        let mut i: usize = 0;
        while i < input.len()
            invariant
                i <= input.len() == dl.len() == dr.len(),
                want.len() == input.len(),
                want == Seq::new(input.len() as nat, |ii: int| num_mat(dl@)[ii] + num_mat(dr@)[ii]),
                out.len() == i,
                forall|ii: int| 0 <= ii < i ==> #[trigger] num_seq(out@[ii]@) == want[ii],
            decreases input.len() - i,
        {
            let row = padded_concat(&dl[i], &dr[i], 0, 0);
            assert(num_seq(row@) =~= want[i as int]);
            out.push(row);
            i = i + 1;
        }
        assert(num_mat(out@) =~= want);
        out
    }

    fn gradient(&self, input: &Vec<i64>, params: &Vec<i64>) -> (r: Vec<Vec<i64>>) {
        let n1 = self.left.param_len();
        let lhs = param_block(params, 0, n1);
        let rhs = param_block(params, n1, params.len());
        assert(num_seq(rhs@) =~= self.right_params(num_seq(params@)));
        let gl = self.left.gradient(input, &lhs);
        let gr = self.right.gradient(input, &rhs);
        proof {
            self.left.lemma_shapes(num_seq(input@), num_seq(lhs@));
            self.right.lemma_shapes(num_seq(input@), num_seq(rhs@));
        }
        let o1 = self.left.output_len();
        let o2 = self.right.output_len();
        let ghost sl = num_mat(gl@);
        let ghost sr = num_mat(gr@);
        let ghost top = Seq::new(gl.len() as nat, |k: int| sl[k] + zeros(o2 as nat));
        let ghost bottom = Seq::new(gr.len() as nat, |k: int| zeros(o1 as nat) + sr[k]);
        let empty: Vec<i64> = Vec::new();
        let mut out: Vec<Vec<i64>> = Vec::new();
        let mut k: usize = 0;
        while k < gl.len()
            invariant
                k <= gl.len(),
                sl == num_mat(gl@),
                top == Seq::new(gl.len() as nat, |k: int| sl[k] + zeros(o2 as nat)),
                empty@.len() == 0,
                out.len() == k,
                forall|kk: int| 0 <= kk < k ==> #[trigger] num_seq(out@[kk]@) == top[kk],
            decreases gl.len() - k,
        {
            let row = padded_concat(&gl[k], &empty, 0, o2);
            assert(num_seq(row@) =~= top[k as int]);
            out.push(row);
            k = k + 1;
        }
        let mut k: usize = 0;
        while k < gr.len()
            invariant
                k <= gr.len(),
                sr == num_mat(gr@),
                bottom == Seq::new(gr.len() as nat, |k: int| zeros(o1 as nat) + sr[k]),
                empty@.len() == 0,
                out.len() == gl.len() + k,
                forall|kk: int| 0 <= kk < gl.len() ==> #[trigger] num_seq(out@[kk]@) == top[kk],
                forall|kk: int| 0 <= kk < k ==> #[trigger] num_seq(out@[gl.len() + kk]@) == bottom[kk],
            decreases gr.len() - k,
        {
            let row = padded_concat(&empty, &gr[k], o1, 0);
            assert(num_seq(row@) =~= bottom[k as int]);
            out.push(row);
            k = k + 1;
        }
        assert forall|j: int| 0 <= j < out.len() implies #[trigger] num_mat(out@)[j] == (top + bottom)[j] by {
            if j >= gl.len() {
                assert(num_seq(out@[gl.len() + (j - gl.len())]@) == bottom[j - gl.len()]);
            }
        }
        assert(num_mat(out@) =~= top + bottom);
        out
    }
}

} // verus!
