# discrete-bayes

Discrete Bayesian inference: Bayes' theorem, discrete priors and posteriors,
Beta-Binomial and Dirichlet-Multinomial conjugate priors, and a naive Bayes
classifier over discrete features.

- `src/` — the verified core (Verus):
  - `counting.rs`: what it means to count labelled examples (per class, and per
    feature, class and value) and the laws of those counts: every example is
    counted once, value counts add up to class counts, one more example raises
    exactly one counter of each kind, and the order of the examples does not
    matter.
  - `training.rs`: `TrainingSet` (labelled examples) and `CountTable` (their
    counts), proved against `counting.rs`.
  - `index_sort.rs`: ascending order for index sets (used by credible sets).
- `app/` — the probability computations on `f64` (which Verus cannot hold):
  Bayes' rule, priors, posteriors, conjugate families and the classifier, which
  trains through `TrainingSet::tally`.
- `tests/` — tests of the verified core.
