mod errors;
mod template;
mod transform;

pub use errors::Error;
pub use template::Nyaaan;
pub use template::NyaaanView;
pub use template::lemma_generate_deterministic;
pub use template::lemma_generate_len;
pub use template::lemma_generate_long;
pub use template::lemma_generate_prefix;
pub use template::spec_generate;
pub use template::spec_infix_len;
pub use transform::flush;
pub use transform::is_word_char;
pub use transform::lemma_passthrough;
pub use transform::nyaanize;
pub use transform::nyaanize_chunk;
pub use transform::spec_flush;
pub use transform::spec_nyaanize;
pub use transform::spec_scan;
pub use transform::spec_step;
