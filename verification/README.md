# Motion estimation

Block motion estimation for a video encoder, verified with Verus.

Given a block of the frame being coded, the library finds the motion vector at
which a reference frame resembles the block most, weighed against the bits that
the vector costs. It works in stages:

- `estimate_motion_ss4`: all positions around the block, in planes of a quarter
  of the width and height;
- `MotionEstimation::estimate_motion_ss2`: in planes of half the width and
  height, from up to three vectors;
- `MotionEstimation::motion_estimation`: over whole pixels, then over fractions
  of pixels.

`DiamondSearch` searches by shrinking diamonds from the vectors of neighbouring
blocks. `FullSearch` tries all positions near a vector and refines the best one
by ever finer steps.

How a block is predicted between pixels is up to the caller, who implements
`InterPredictor`. The library has `WholePixelPredictor`, which does not
interpolate.

## What is proved

Each function states the vector and the cost it finds, as a mathematical
function of the pixels. The functions do not overflow and do not read outside a
plane, given what they require. The public proof functions state what holds of
all inputs: in `src/laws.rs` of the parts, in `src/estimation_laws.rs` of motion
estimation as a whole, and in `src/defined_laws.rs` which frames and blocks it
is defined for.

Not proved is what `arrayvec::ArrayVec` does; `src/predictors.rs` says what is
taken for granted of it. Where the caller's `InterPredictor` is not verified,
what is proved of searches over fractions of pixels rests on its meeting the
contract of that trait.

## Layout

- `src/`: the library.
- `tests/`: its tests.
- `app/`: the conversion of the factor lambda from floating point.
