//! A compiler core for a small C-like language: the syntax tree is lowered
//! to textual IR (`generate_ir`), and an IR function graph is translated to
//! RISC-V assembly (`generate_asm`).  Each translation is specified by spec
//! functions over the tree or graph, and the executable code is proved to
//! append exactly the specified bytes.
pub mod ast;
pub mod ir_text;
pub mod sym_table;
pub mod generate_ir;
pub mod generate_asm;
pub mod theorems;
pub mod folding;
pub mod ret_paths;
