//! A small pseudo-random number library built around three deterministic
//! bit generators (a reduced-round ChaCha stream, xoshiro256++ and a
//! 128-bit PCG), unbiased value and range derivation on top of them, and
//! a health-tested wrapper around the operating system's entropy source.

pub mod chacha;
pub mod devices;
pub mod entropy;
pub mod nonces;
pub mod pcg;
pub mod ranges;
pub mod rng;
pub mod secure_entropy;
pub mod smallrng;
pub mod stdrng;
pub mod xoshiro;

pub use chacha::ChaCha12;
pub use entropy::DefaultEntropy;
pub use entropy::EntropyError;
pub use entropy::EntropySource;
pub use entropy::GetRandom;
pub use entropy::HashMapEntropy;
pub use entropy::SplitMix;
pub use ranges::GenerateRange;
pub use rng::Rng;
pub use secure_entropy::SecureEntropy;
pub use smallrng::SmallRng;
pub use stdrng::StdRng;
pub use xoshiro::Xoshiro256pp;
