//! Analytic-geometry kernel for ray-based rendering: homogeneous-coordinate
//! points and vectors, general matrices with cofactor determinant and
//! adjugate inverse, affine transforms, rays, and spheres with closed-form
//! ray intersection and surface normals.
//!
//! Every quantity is an exact fixed-point number (`scalar::Scalar`), so each
//! operation's result is pinned down to the grid step by its contract.

pub mod canvas;
pub mod clock_challenge;
pub mod color;
pub mod intersection;
pub mod laws;
pub mod matrix;
pub mod object;
pub mod point;
pub mod projectile_challenge;
pub mod ray;
pub mod scalar;
pub mod sphere;
pub mod sphere_silhouette;
pub mod utils;
pub mod vector;
