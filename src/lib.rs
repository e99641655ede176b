//! A layer-4 reverse proxy core: backend selection policies and the
//! per-connection relay lifecycle, with their contracts proved by Verus.
pub mod config;
pub mod lemmas;
pub mod load_balancer;
pub mod relay;
