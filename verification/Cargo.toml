[package]
name = "chaos_theory"
version = "0.1.0"
edition = "2021"
publish = false

[dependencies]
anyhow = "=1.0.104"
num_cpus = "1"
ode_solvers = "=0.4.0"
rand = "=0.8.8"
rand_distr = "=0.4.3"
web-time = "1"
