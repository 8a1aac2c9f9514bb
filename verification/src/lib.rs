#![allow(non_snake_case)]
//! Krylov-subspace solvers for linear systems whose matrix is given only as an
//! operator, generic over an abstract real or complex scalar.
//!
//! The solver is restarted GMRES with an adaptive restart length
//! ([`agmres`]). It rests on an incrementally extended Arnoldi basis
//! ([`arnoldi`]), on plane rotations that keep the projected problem
//! triangular ([`givens`]), and on back substitution ([`least_squares`]).
//! Scalars and their arithmetic are abstract ([`scalar`]), vectors are
//! plain lists of scalars ([`vector`]), and operators are closures
//! ([`operator`]).
//!
//! Every contract says which scalar operations a function performs and in
//! which order, so it holds whatever the rounding of the arithmetic. What
//! the computed quantities mean where the arithmetic is exact is proved
//! separately ([`exact`]).
//!
//! The keywords and layout rules of the Matrix Market format, in which
//! problems are commonly exchanged, are in [`market`].

pub mod agmres;
pub mod arnoldi;
pub mod exact;
pub mod givens;
pub mod least_squares;
pub mod market;
pub mod operator;
pub mod scalar;
pub mod vector;
