//! Sandbox policy compilation engine.
//!
//! Converts a small, platform-independent description of what a command
//! may read, write and reach over the network into concrete enforcement
//! inputs, with the safety-relevant steps verified:
//!
//! - [`policy`]: the [`policy::SandboxPolicy`] value type and its pure
//!   access predicates;
//! - [`resolver`]: writable-root resolution — candidates, symlink-proof
//!   deduplication, and the read-only carve-outs for version-control and
//!   agent-config directories;
//! - [`seatbelt`]: the macOS profile compiler, whose profile text never
//!   carries a filesystem path — paths travel out-of-band as named
//!   parameters;
//! - [`landlock`]: the Linux kernel-ruleset compiler, which fails closed
//!   when its companion helper is absent;
//! - [`launcher`]: spawn preparation, including the single reserved
//!   environment marker naming the active backend;
//! - [`summary`], [`denials`], [`cli_arg`], [`skills`]: policy
//!   summaries, denial-report de-duplication, the command-line mode
//!   selector, and the skill-inventory cache.
//!
//! Reading the live filesystem (canonicalization, directory existence)
//! and everything the verifier cannot see (spawning, log streams,
//! argument parsing) stay with the calling layer; the library takes and
//! returns plain values.

pub mod cli_arg;
pub mod denials;
pub mod landlock;
pub mod launcher;
pub mod paths;
pub mod policy;
pub mod resolver;
pub mod seatbelt;
pub mod skills;
pub mod summary;
