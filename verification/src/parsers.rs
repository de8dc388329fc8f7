pub mod boolean;
pub mod primitives;
pub mod decimal;
pub mod hexadecimal;
pub mod string;
pub mod text;
pub mod random;
pub mod embed;
pub mod math;
