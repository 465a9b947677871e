pub mod au_gru;
pub mod batch_norm;
pub mod binary;
pub mod eltwise;
pub mod inner_product;
pub mod matmul;
pub mod prelu;
pub mod reduction;
