pub mod xk68js;
