//! Tests of the layer contract, model composition, losses,
//! optimizers, schedules and the training loop.

use cognitio::activations::Identity;
use cognitio::constraints::Constraint;
use cognitio::layers::activation;
use cognitio::layers::dense;
use cognitio::losses::{Loss, Square};
use cognitio::model::{Model, ModelError, StageBuilder};
use cognitio::optimizers::{MiniBatch, Optimizer, SGD};
use cognitio::regularizers::Regularization;
use cognitio::schedules::{ExponentialDecay, LearningRateSchedule};
use cognitio::shape::Shape;
use cognitio::tensor::Tensor;
use cognitio::trainer::Trainer;

#[test]
fn dense_feed_forward_computes_the_affine_combination() {
    let layer = dense::Builder::new()
        .output_shape(Shape::new(vec![2]))
        .kernel_initializer(1)
        .bias_initializer(5)
        .activation(Identity::new())
        .kernel_regularizer(Regularization::Off)
        .bias_regularizer(Regularization::Off)
        .activity_regularizer(Regularization::Off)
        .kernel_constraint(Constraint::Off)
        .bias_constraint(Constraint::Off)
        .build(Shape::new(vec![3]))
        .unwrap();
    // kernel all ones: each output is bias + sum of inputs
    let x = Tensor::from_vec(vec![1, 2, 3]);
    let y = layer.feed_forward(&x);
    assert_eq!(*y.get(&vec![0]), 11);
    assert_eq!(*y.get(&vec![1]), 11);
}

#[test]
fn chain_forward_equals_composition_of_stage_forwards() {
    let a = dense::Builder::new()
        .output_shape(Shape::new(vec![2]))
        .kernel_initializer(2)
        .bias_initializer(1)
        .build(Shape::new(vec![2]))
        .unwrap();
    let b = dense::Builder::new()
        .output_shape(Shape::new(vec![1]))
        .kernel_initializer(3)
        .bias_initializer(-1)
        .build(Shape::new(vec![2]))
        .unwrap();
    let x = Tensor::from_vec(vec![4, 5]);
    let ya = a.feed_forward(&x);
    let composed = b.feed_forward(&ya);

    let model = Model::sequential()
        .add_layer(StageBuilder::Dense(
            dense::Builder::new()
                .output_shape(Shape::new(vec![2]))
                .kernel_initializer(2)
                .bias_initializer(1),
        ))
        .add_layer(StageBuilder::Dense(
            dense::Builder::new()
                .output_shape(Shape::new(vec![1]))
                .kernel_initializer(3)
                .bias_initializer(-1),
        ))
        .build(Shape::new(vec![2]))
        .unwrap();
    let chained = model.feed_forward(&x);
    assert_eq!(*chained.get(&vec![0]), *composed.get(&vec![0]));
    // (4+5)*2+1 = 19 per slot; second stage: 19*3 + 19*3 - 1 = 113
    assert_eq!(*chained.get(&vec![0]), 113);
}

#[test]
fn chain_backward_composes_stage_backward_passes_in_reverse() {
    let model = Model::sequential()
        .add_layer(StageBuilder::Dense(
            dense::Builder::new()
                .output_shape(Shape::new(vec![2]))
                .kernel_initializer(2)
                .bias_initializer(1),
        ))
        .add_layer(StageBuilder::Dense(
            dense::Builder::new()
                .output_shape(Shape::new(vec![1]))
                .kernel_initializer(3)
                .bias_initializer(-1),
        ))
        .build(Shape::new(vec![2]))
        .unwrap();
    let a = dense::Builder::new()
        .output_shape(Shape::new(vec![2]))
        .kernel_initializer(2)
        .bias_initializer(1)
        .build(Shape::new(vec![2]))
        .unwrap();
    let b = dense::Builder::new()
        .output_shape(Shape::new(vec![1]))
        .kernel_initializer(3)
        .bias_initializer(-1)
        .build(Shape::new(vec![2]))
        .unwrap();

    let x = Tensor::from_vec(vec![4, 5]);
    let g = Tensor::from_vec(vec![7]);

    // chain backward
    let (_, ctx) = model.back_propagate(&x);
    let (chain_input_grad, _deltas) = model.backward(ctx, &g);

    // composing the two layers' one-shot closures by hand, in
    // reverse order
    let (ya, actx) = a.back_propagate(&x);
    let (_yb, bctx) = b.back_propagate(&ya);
    let (gb, _b_params) = b.backward(bctx, &g);
    let (ga, _a_params) = a.backward(actx, &gb);

    assert_eq!(*chain_input_grad.get(&vec![0]), *ga.get(&vec![0]));
    assert_eq!(*chain_input_grad.get(&vec![1]), *ga.get(&vec![1]));
}

#[test]
fn zero_dense_layer_maps_everything_to_zero_but_learns() {
    // a dense stage with all-zero kernel and bias and the identity
    // activation sends any input to zero
    let layer = dense::Builder::new()
        .output_shape(Shape::new(vec![2]))
        .build(Shape::new(vec![3]))
        .unwrap();
    let x = Tensor::from_vec(vec![5, -7, 11]);
    let y = layer.feed_forward(&x);
    assert_eq!(*y.get(&vec![0]), 0);
    assert_eq!(*y.get(&vec![1]), 0);

    // against a nonzero target, the squared-error gradient of the
    // parameters is nonzero
    let target = Tensor::from_vec(vec![4, 4]);
    let loss = Square::new();
    let g = loss.derive(&y, &target);
    let (_, ctx) = layer.back_propagate(&x);
    let (_input_grad, params) = layer.backward(ctx, &g);
    let bias_grad = &params[1];
    assert_eq!(*bias_grad.get(&vec![0]), -8);
    let kernel_grad = &params[0];
    assert_eq!(*kernel_grad.get(&vec![0, 0]), -40);
    assert!(*kernel_grad.get(&vec![1, 0]) != 0);
}

#[test]
fn incompatible_chain_fails_at_build_not_at_feed_forward() {
    // first stage produces [10]; the second stage requires [8]
    let result = Model::sequential()
        .add_layer(StageBuilder::Dense(
            dense::Builder::new().output_shape(Shape::new(vec![10])),
        ))
        .add_layer(StageBuilder::Activation(
            activation::Builder::new().shape(Shape::new(vec![8])),
        ))
        .build(Shape::new(vec![4]));
    match result {
        Err(ModelError::ShapeMismatch(expected, actual)) => {
            assert_eq!(expected, vec![8]);
            assert_eq!(actual, vec![10]);
        }
        _ => panic!(),
    }
}

#[test]
fn dense_builder_requires_an_output_shape() {
    let r = dense::Builder::new().build(Shape::new(vec![3]));
    assert!(matches!(r, Err(ModelError::MissingConfiguration)));
}

#[test]
fn dense_builder_rejects_kernels_larger_than_the_address_space() {
    let r = dense::Builder::new()
        .output_shape(Shape::new(vec![2]))
        .build(Shape::new(vec![usize::MAX]));
    assert!(matches!(r, Err(ModelError::CapacityOverflow)));
}

#[test]
fn empty_chain_is_the_identity_model() {
    let model = Model::sequential().build(Shape::new(vec![3])).unwrap();
    let x = Tensor::from_vec(vec![9, 8, 7]);
    let y = model.feed_forward(&x);
    assert_eq!(*y.get(&vec![0]), 9);
    assert_eq!(*y.get(&vec![2]), 7);
}

#[test]
fn square_loss_and_gradient() {
    let p = Tensor::from_vec(vec![3, 0]);
    let e = Tensor::from_vec(vec![1, 2]);
    let loss = Square::new();
    assert_eq!(loss.loss(&p, &e), 8);
    let g = loss.derive(&p, &e);
    assert_eq!(*g.get(&vec![0]), 4);
    assert_eq!(*g.get(&vec![1]), -4);
}

#[test]
fn regularization_penalties_and_derivatives() {
    let t = Tensor::from_vec(vec![-3, 0, 4]);
    let l1 = Regularization::L1(2);
    assert_eq!(l1.regularization(&t), 14);
    let d1 = l1.derive(&t);
    assert_eq!(*d1.get(&vec![0]), -2);
    assert_eq!(*d1.get(&vec![1]), 0);
    assert_eq!(*d1.get(&vec![2]), 2);
    let l2 = Regularization::L2(1);
    assert_eq!(l2.regularization(&t), 25);
    let d2 = l2.derive(&t);
    assert_eq!(*d2.get(&vec![2]), 8);
    let off = Regularization::Off;
    assert_eq!(off.regularization(&t), 0);
    assert_eq!(*off.derive(&t).get(&vec![0]), 0);
}

#[test]
fn exponential_decay_steps_down_per_period() {
    let mut s = ExponentialDecay::new(100, 2, 2, true);
    assert_eq!(s.next(), 100);
    assert_eq!(s.next(), 100);
    assert_eq!(s.next(), 200);
    assert_eq!(s.next(), 200);
    assert_eq!(s.next(), 400);
    let mut c: i64 = 9;
    assert_eq!(c.next(), 9);
    assert_eq!(c.next(), 9);
}

#[test]
fn sgd_scales_gradients_by_the_learning_rate() {
    let mut model = Model::sequential()
        .add_layer(StageBuilder::Dense(
            dense::Builder::new().output_shape(Shape::new(vec![1])),
        ))
        .build(Shape::new(vec![1]))
        .unwrap();
    let x = Tensor::from_vec(vec![3]);
    let g = Tensor::from_vec(vec![2]);
    let (_, ctx) = model.back_propagate(&x);
    let (_, grads) = model.backward(ctx, &g);
    let mut opt = SGD::new(5i64);
    let deltas = opt.gradients_to_deltas(grads).unwrap();
    model.update(&deltas);
    // kernel gradient was 2*3 = 6, scaled by 5 and subtracted from 0
    let y = model.feed_forward(&x);
    // kernel now -30, bias now -10: output = -30*3 - 10
    assert_eq!(*y.get(&vec![0]), -100);
}

#[test]
fn mini_batch_withholds_deltas_until_the_batch_completes() {
    let model = Model::sequential()
        .add_layer(StageBuilder::Dense(
            dense::Builder::new().output_shape(Shape::new(vec![1])),
        ))
        .build(Shape::new(vec![1]))
        .unwrap();
    let x = Tensor::from_vec(vec![1]);
    let g = Tensor::from_vec(vec![1]);
    let mut opt = MiniBatch::new(2, SGD::new(1i64));
    let (_, ctx1) = model.back_propagate(&x);
    let (_, grads1) = model.backward(ctx1, &g);
    assert!(opt.gradients_to_deltas(grads1).is_none());
    let (_, ctx2) = model.back_propagate(&x);
    let (_, grads2) = model.backward(ctx2, &g);
    let released = opt.gradients_to_deltas(grads2);
    assert!(released.is_some());
}

#[test]
fn training_moves_predictions_toward_the_target() {
    let model = Model::sequential()
        .add_layer(StageBuilder::Dense(
            dense::Builder::new().output_shape(Shape::new(vec![1])),
        ))
        .build(Shape::new(vec![1]))
        .unwrap();
    let dataset = vec![(Tensor::from_vec(vec![1]), Tensor::from_vec(vec![8]))];
    let mut trainer = Trainer::new(model, SGD::new(1i64));
    trainer.train(1, &dataset, &Square::new());
    let (model, _opt) = trainer.into_parts();
    let y = model.feed_forward(&Tensor::from_vec(vec![1]));
    // one step: gradient 2*(0-8) = -16 for kernel and bias; with
    // learning rate 1 both become 16: prediction 16*1 + 16 = 32
    assert_eq!(*y.get(&vec![0]), 32);
}

#[test]
fn activation_stage_backward_scales_by_the_derivative() {
    // for the identity activation the derivative is one everywhere,
    // so the input gradient equals the output gradient unchanged
    let layer = activation::Builder::new()
        .activation(Identity::new())
        .build(Shape::new(vec![3]))
        .unwrap();
    let x = Tensor::from_vec(vec![5, -6, 7]);
    let (out, ctx) = layer.back_propagate(&x);
    assert_eq!(*out.get(&vec![0]), 5);
    let g = Tensor::from_vec(vec![7, 11, -13]);
    let input_grad = layer.backward(ctx, &g);
    assert_eq!(*input_grad.get(&vec![0]), 7);
    assert_eq!(*input_grad.get(&vec![1]), 11);
    assert_eq!(*input_grad.get(&vec![2]), -13);
}

#[test]
fn sgd_draws_a_fresh_rate_per_stage_level() {
    // with a decaying schedule, the deeper stage of a two-stage chain
    // is scaled by a later (here: doubled) rate than the head stage
    let model = Model::sequential()
        .add_layer(StageBuilder::Dense(
            dense::Builder::new().output_shape(Shape::new(vec![1])),
        ))
        .add_layer(StageBuilder::Dense(
            dense::Builder::new().output_shape(Shape::new(vec![1])),
        ))
        .build(Shape::new(vec![1]))
        .unwrap();
    let x = Tensor::from_vec(vec![1]);
    let g = Tensor::from_vec(vec![1]);
    let (_, ctx) = model.back_propagate(&x);
    let (_, grads) = model.backward(ctx, &g);
    // rates: 3 for the first level, then 6 for the second
    let mut opt = SGD::new(ExponentialDecay::new(3, 2, 1, true));
    let deltas = opt.gradients_to_deltas(grads).unwrap();
    match deltas {
        cognitio::model::Deltas::Node(head, rest) => {
            // head stage: kernel gradient 0 (zero forward output is
            // multiplied into it), bias gradient 0 as well, scaled by 3
            assert_eq!(head.len(), 2);
            match *rest {
                cognitio::model::Deltas::Node(second, _) => {
                    // second stage: bias gradient 1 scaled by the
                    // advanced rate 6
                    assert_eq!(*second[1].get(&vec![0]), 6);
                }
                _ => panic!(),
            }
        }
        _ => panic!(),
    }
}
