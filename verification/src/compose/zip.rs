//! Parallel composition.

use vstd::prelude::*;
use crate::network::{Intermediate, Network};
use crate::scalar::Scalar;
use crate::array::{array_of, collect_array, lemma_array_of, lemma_array_of_view};

verus! {

/// A way to merge the outputs of two networks into one value, and to pull a
/// merged value apart again.
///
/// `unzip` must do exactly the reverse of `zip`; an implementation proves so
/// in [`Zipper::unzip_zip`].
pub trait Zipper<Top, Bot> {
    /// The merged value.
    type Zipped;

    /// Whether the zipper is fit for use.
    spec fn wf(&self) -> bool;

    /// The merged value of `top` and `bot`.
    spec fn spec_zip(&self, top: &Top, bot: &Bot) -> Self::Zipped;

    /// The two halves of `zipped`.
    spec fn spec_unzip(&self, zipped: &Self::Zipped) -> (Top, Bot);

    /// Pulling apart what was merged gives back the two halves.
    proof fn unzip_zip(&self, top: &Top, bot: &Bot)
        requires
            self.wf(),
        ensures
            self.spec_unzip(&self.spec_zip(top, bot)) == (*top, *bot),
    ;

    /// Merges `top` and `bot`.
    fn zip(&self, top: &Top, bot: &Bot) -> (zipped: Self::Zipped)
        requires
            self.wf(),
        ensures
            zipped == self.spec_zip(top, bot),
    ;

    /// Pulls `zipped` apart.
    fn unzip(&self, zipped: &Self::Zipped) -> (halves: (Top, Bot))
        requires
            self.wf(),
        ensures
            halves == self.spec_unzip(zipped),
    ;
}

/// Zip two parallel networks into the same output.
///
/// # Type parameters
/// - `T` and `U` represent the zipped networks.
/// - `Z` combines the outputs of both networks into one, and pulls the
///   gradients over the combined output apart.
pub struct Zip<T, U, Z> {
    /// The network on the first half of the inputs.
    pub top: T,
    /// The network on the second half of the inputs.
    pub bot: U,
    /// What merges the outputs and pulls the gradients apart.
    pub zipper: Z,
}

/// The intermediate values of an evaluation of a [`Zip`].
pub struct ZipInter<T, U, Z> {
    /// The intermediate values of the top network.
    pub top: T,
    /// The intermediate values of the bottom network.
    pub bot: U,
    /// The combined output of the networks.
    pub zipped: Z,
}

impl<T, U, Z> Intermediate for ZipInter<T, U, Z> where T: Intermediate, U: Intermediate {
    type Out = Z;

    open spec fn spec_output(&self) -> Self::Out {
        self.zipped
    }

    fn output(&self) -> (out: &Self::Out) {
        &self.zipped
    }

    fn into_output(self) -> (out: Self::Out) {
        self.zipped
    }
}

impl<T, U, Z> Network for Zip<T, U, Z> where
    T: Network,
    U: Network<Rate = T::Rate>,
    Z: Zipper<T::Out, U::Out>,
    T::Rate: Copy,
 {
    type In = (T::In, U::In);

    type Out = Z::Zipped;

    type Inter = ZipInter<T::Inter, U::Inter, Z::Zipped>;

    type Rate = T::Rate;

    open spec fn wf(&self) -> bool {
        self.top.wf() && self.bot.wf() && self.zipper.wf()
    }

    open spec fn spec_intermediate(&self, inputs: &Self::In) -> Self::Inter {
        let top = self.top.spec_intermediate(&inputs.0);
        let bot = self.bot.spec_intermediate(&inputs.1);
        ZipInter { top, bot, zipped: self.zipper.spec_zip(&top.spec_output(), &bot.spec_output()) }
    }

    open spec fn spec_train_deriv(
        &self,
        inputs: &Self::In,
        intermediate: &Self::Inter,
        gradients: &Self::Out,
        learning_rate: Self::Rate,
    ) -> Self::In {
        let halves = self.zipper.spec_unzip(gradients);
        (
            self.top.spec_train_deriv(&inputs.0, &intermediate.top, &halves.0, learning_rate),
            self.bot.spec_train_deriv(&inputs.1, &intermediate.bot, &halves.1, learning_rate),
        )
    }

    open spec fn spec_trained(
        &self,
        inputs: &Self::In,
        intermediate: &Self::Inter,
        gradients: &Self::Out,
        learning_rate: Self::Rate,
    ) -> Self {
        let halves = self.zipper.spec_unzip(gradients);
        Zip {
            top: self.top.spec_trained(&inputs.0, &intermediate.top, &halves.0, learning_rate),
            bot: self.bot.spec_trained(&inputs.1, &intermediate.bot, &halves.1, learning_rate),
            zipper: self.zipper,
        }
    }

    proof fn trained_wf(
        &self,
        inputs: &Self::In,
        intermediate: &Self::Inter,
        gradients: &Self::Out,
        learning_rate: Self::Rate,
    ) {
        let halves = self.zipper.spec_unzip(gradients);
        self.top.trained_wf(&inputs.0, &intermediate.top, &halves.0, learning_rate);
        self.bot.trained_wf(&inputs.1, &intermediate.bot, &halves.1, learning_rate);
    }

    fn intermediate(&self, inputs: &Self::In) -> (inter: Self::Inter) {
        let top = self.top.intermediate(&inputs.0);
        let bot = self.bot.intermediate(&inputs.1);
        let zipped = self.zipper.zip(top.output(), bot.output());
        ZipInter { top, bot, zipped }
    }

    fn train_deriv(
        &mut self,
        inputs: &Self::In,
        intermediate: &Self::Inter,
        gradients: &Self::Out,
        learning_rate: Self::Rate,
    ) -> (input_gradients: Self::In) {
        let (top_gr, bot_gr) = self.zipper.unzip(gradients);
        let top = self.top.train_deriv(&inputs.0, &intermediate.top, &top_gr, learning_rate);
        let bot = self.bot.train_deriv(&inputs.1, &intermediate.bot, &bot_gr, learning_rate);
        (top, bot)
    }
}

/// Stacks and unstacks constant arrays.
#[derive(Clone, Copy, Debug)]
pub struct Stacker<const A: usize, const B: usize, const SUM: usize>;

/// Stacks the vectors: `top` first, `bot` after it.
pub fn stacked<S: Scalar, const A: usize, const B: usize, const SUM: usize>(
    top: &[S; A],
    bot: &[S; B],
) -> (zipped: [S; SUM])
    requires
        SUM == A + B,
    ensures
        zipped@ == top@ + bot@,
{
    if SUM > u32::MAX as usize {
        // More than a collected array can hold: the items are put in place
        // one by one.
        return stacked_in_place(top, bot);
    }
    let mut all: Vec<S> = Vec::with_capacity(SUM);
    let mut i: usize = 0;
    while i < A
        invariant
            i <= A,
            all@ == top@.take(i as int),
        decreases A - i,
    {
        all.push(top[i]);
        i += 1;
    }
    let mut j: usize = 0;
    while j < B
        invariant
            j <= B,
            all@ == top@ + bot@.take(j as int),
        decreases B - j,
    {
        all.push(bot[j]);
        j += 1;
    }
    match collect_array::<S, SUM>(&all) {
        Some(zipped) => zipped,
        None => vstd::pervasive::unreached::<[S; SUM]>(),
    }
}

/// Stacks the vectors by writing each item to its place.
fn stacked_in_place<S: Scalar, const A: usize, const B: usize, const SUM: usize>(
    top: &[S; A],
    bot: &[S; B],
) -> (zipped: [S; SUM])
    requires
        SUM == A + B,
    ensures
        zipped@ == top@ + bot@,
{
    let mut zipped: [S; SUM] = [S::zero();SUM];
    let mut i: usize = 0;
    while i < A
        invariant
            SUM == A + B,
            i <= A,
            forall|k: int| 0 <= k < i ==> zipped@[k] == top@[k],
        decreases A - i,
    {
        zipped[i] = top[i];
        i += 1;
    }
    let mut j: usize = 0;
    while j < B
        invariant
            SUM == A + B,
            j <= B,
            forall|k: int| 0 <= k < A ==> zipped@[k] == top@[k],
            forall|k: int| 0 <= k < j ==> zipped@[A + k] == bot@[k],
        decreases B - j,
    {
        zipped[A + j] = bot[j];
        j += 1;
    }
    assert(zipped@ =~= top@ + bot@);
    zipped
}

/// Unstacks the vectors: the first `A` items, and the `B` items after them.
pub fn unstacked<S: Scalar, const A: usize, const B: usize, const SUM: usize>(x: &[S; SUM]) -> (halves:
    ([S; A], [S; B]))
    requires
        SUM == A + B,
    ensures
        halves.0@ == x@.subrange(0, A as int),
        halves.1@ == x@.subrange(A as int, SUM as int),
        halves.0@ + halves.1@ == x@,
{
    let mut top: [S; A] = [S::zero();A];
    let mut bot: [S; B] = [S::zero();B];
    let mut i: usize = 0;
    while i < A
        invariant
            SUM == A + B,
            i <= A,
            forall|k: int| 0 <= k < i ==> top@[k] == x@[k],
        decreases A - i,
    {
        top[i] = x[i];
        i += 1;
    }
    let mut j: usize = 0;
    while j < B
        invariant
            SUM == A + B,
            j <= B,
            forall|k: int| 0 <= k < j ==> bot@[k] == x@[A + k],
        decreases B - j,
    {
        bot[j] = x[A + j];
        j += 1;
    }
    (top, bot)
}

impl<S: Scalar, const A: usize, const B: usize, const SUM: usize> Zipper<[S; A], [S; B]> for Stacker<
    A,
    B,
    SUM,
> {
    type Zipped = [S; SUM];

    open spec fn wf(&self) -> bool {
        SUM == A + B
    }

    open spec fn spec_zip(&self, top: &[S; A], bot: &[S; B]) -> [S; SUM] {
        array_of(top@ + bot@)
    }

    open spec fn spec_unzip(&self, zipped: &[S; SUM]) -> ([S; A], [S; B]) {
        (array_of(zipped@.subrange(0, A as int)), array_of(zipped@.subrange(A as int, SUM as int)))
    }

    proof fn unzip_zip(&self, top: &[S; A], bot: &[S; B]) {
        let zipped = self.spec_zip(top, bot);
        lemma_array_of::<S, SUM>(top@ + bot@);
        assert(zipped@.subrange(0, A as int) =~= top@);
        assert(zipped@.subrange(A as int, SUM as int) =~= bot@);
        lemma_array_of_view(*top);
        lemma_array_of_view(*bot);
    }

    fn zip(&self, top: &[S; A], bot: &[S; B]) -> (zipped: [S; SUM]) {
        let zipped = stacked(top, bot);
        proof {
            lemma_array_of_view(zipped);
        }
        zipped
    }

    fn unzip(&self, zipped: &[S; SUM]) -> (halves: ([S; A], [S; B])) {
        let halves = unstacked(zipped);
        proof {
            lemma_array_of_view(halves.0);
            lemma_array_of_view(halves.1);
        }
        halves
    }
}

/// Unstacking what was stacked gives back the two vectors, for any arrays
/// that hold what `stacked` and `unstacked` promise.
pub proof fn lemma_unstacked_stacked<S, const A: usize, const B: usize, const SUM: usize>(
    top: [S; A],
    bot: [S; B],
    zipped: [S; SUM],
    halves: ([S; A], [S; B]),
)
    requires
        SUM == A + B,
        zipped@ == top@ + bot@,
        halves.0@ == zipped@.subrange(0, A as int),
        halves.1@ == zipped@.subrange(A as int, SUM as int),
    ensures
        halves == (top, bot),
{
}

/// Stacking what was unstacked gives back the vector, for any arrays that
/// hold what `unstacked` and `stacked` promise.
pub proof fn lemma_stacked_unstacked<S, const A: usize, const B: usize, const SUM: usize>(
    x: [S; SUM],
    halves: ([S; A], [S; B]),
    zipped: [S; SUM],
)
    requires
        SUM == A + B,
        halves.0@ == x@.subrange(0, A as int),
        halves.1@ == x@.subrange(A as int, SUM as int),
        zipped@ == halves.0@ + halves.1@,
    ensures
        zipped == x,
{
    assert(zipped@ =~= x@);
}

/// A stacker is an exact inverse pair in both directions, whatever the sizes:
/// unstacking undoes stacking, and stacking undoes unstacking.
pub proof fn lemma_stacker_inverse<S: Scalar, const A: usize, const B: usize, const SUM: usize>(
    stacker: Stacker<A, B, SUM>,
    top: [S; A],
    bot: [S; B],
    x: [S; SUM],
)
    requires
        SUM == A + B,
    ensures
        stacker.spec_unzip(&stacker.spec_zip(&top, &bot)) == (top, bot),
        ({
            let halves = Zipper::<[S; A], [S; B]>::spec_unzip(&stacker, &x);
            stacker.spec_zip(&halves.0, &halves.1) == x
        }),
{
    stacker.unzip_zip(&top, &bot);
    let halves = Zipper::<[S; A], [S; B]>::spec_unzip(&stacker, &x);
    lemma_array_of::<S, A>(x@.subrange(0, A as int));
    lemma_array_of::<S, B>(x@.subrange(A as int, SUM as int));
    assert(halves.0@ + halves.1@ =~= x@);
    lemma_array_of_view(x);
}

/// The output of a zip is the merged outputs of its two networks, and the
/// gradients that training hands back are those of the two networks on the
/// two halves of the gradients over the merged output.
pub proof fn lemma_zip_splits<T, U, Z>(
    zip: Zip<T, U, Z>,
    inputs: (T::In, U::In),
    top_gradients: T::Out,
    bot_gradients: U::Out,
    learning_rate: T::Rate,
) where T: Network, U: Network<Rate = T::Rate>, Z: Zipper<T::Out, U::Out>, T::Rate: Copy
    requires
        zip.wf(),
    ensures
        ({
            let inter = zip.spec_intermediate(&inputs);
            let gradients = zip.zipper.spec_zip(&top_gradients, &bot_gradients);
            let trained = zip.spec_trained(&inputs, &inter, &gradients, learning_rate);
            &&& zip.zipper.spec_unzip(&inter.spec_output()) == (
                inter.top.spec_output(),
                inter.bot.spec_output(),
            )
            &&& zip.spec_train_deriv(&inputs, &inter, &gradients, learning_rate) == (
                zip.top.spec_train_deriv(&inputs.0, &inter.top, &top_gradients, learning_rate),
                zip.bot.spec_train_deriv(&inputs.1, &inter.bot, &bot_gradients, learning_rate),
            )
            &&& trained.top == zip.top.spec_trained(
                &inputs.0,
                &inter.top,
                &top_gradients,
                learning_rate,
            )
            &&& trained.bot == zip.bot.spec_trained(
                &inputs.1,
                &inter.bot,
                &bot_gradients,
                learning_rate,
            )
        }),
{
    let inter = zip.spec_intermediate(&inputs);
    zip.zipper.unzip_zip(&inter.top.spec_output(), &inter.bot.spec_output());
    zip.zipper.unzip_zip(&top_gradients, &bot_gradients);
}

} // verus!
