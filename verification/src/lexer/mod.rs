pub mod token;
pub mod token_stream;
pub mod token_text;
