# zoomer_gp

Gaussian-process regression with composable covariance kernels, for use from R.

The crate is split in two.

* `src/` is the verified library (Verus). It holds everything that does not
  compute with floating-point numbers:
  * `constraint` – the parameter constraints and their collection;
  * `kernel` – the kernel tree (`kernel::kernel::Kernel<T>`, generic over the
    parameter value type): parameter counts, recommended constraints, handing
    parameters to the tree, deep copies, building a tree from a kernel
    specification (`kernel::specification`, `kernel::utils::parse_kernel_recursive`),
    rendering the tree as text and selecting a sub-kernel by its printed label;
  * `model` – how each model lays out its parameter vector;
  * `coin_optimizer` – the early-stopping state of the coin-betting optimiser;
  * `likelihood` – the outcomes of the logistic likelihood;
  * `text`, `util` – small helpers.
* `app/` is ordinary Rust: kernel evaluation and gradients, datasets, dual
  numbers, likelihood evaluation, the Newton–Schulz matrix square root, the
  models, the optimisers and the R bindings. It instantiates the kernels with
  `f64` parameters.
