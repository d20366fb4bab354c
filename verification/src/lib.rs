//! Deterministic pseudo-random number generation and unbiased uniform
//! integer sampling over an arbitrary inclusive range.

mod random_generator;
mod uniform_int_distribution;
mod xoro_shiro_128_plus;

pub use random_generator::cardinality;
pub use random_generator::delta_at;
pub use random_generator::lemma_delta_in_range;
pub use random_generator::lemma_steps_add;
pub use random_generator::lemma_steps_keep_bounds;
pub use random_generator::lemma_stream_determinism;
pub use random_generator::steps;
pub use random_generator::RandomGenerator;
pub use xoro_shiro_128_plus::lemma_seeded_wf;
pub use xoro_shiro_128_plus::lemma_step_preserves_wf;
pub use xoro_shiro_128_plus::spec_jump_pass;
pub use xoro_shiro_128_plus::spec_rotl;
pub use xoro_shiro_128_plus::spec_seeded;
pub use xoro_shiro_128_plus::spec_sum_low32;
pub use xoro_shiro_128_plus::spec_to_signed32;
pub use xoro_shiro_128_plus::xoro_shiro_128_plus;
pub use xoro_shiro_128_plus::XoroShiro128Plus;
pub use xoro_shiro_128_plus::JUMP_0;
pub use xoro_shiro_128_plus::JUMP_1;
pub use uniform_int_distribution::accepts_large;
pub use uniform_int_distribution::accepts_small;
pub use uniform_int_distribution::aggregated;
pub use uniform_int_distribution::attempt_value;
pub use uniform_int_distribution::is_num_iterations;
pub use uniform_int_distribution::max_allowed_of;
pub use uniform_int_distribution::sample_post;
pub use uniform_int_distribution::sample_post_large;
pub use uniform_int_distribution::sample_post_small;
pub use uniform_int_distribution::sample_pre;
pub use uniform_int_distribution::uniform_int_distribution;
pub use uniform_int_distribution::unsafe_uniform_int_distribution;
pub use uniform_int_distribution::PreconditionViolation;
pub use uniform_int_distribution::ATTEMPT_BOUND;
