pub mod id_to_f252;
