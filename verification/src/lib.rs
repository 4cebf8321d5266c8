pub mod array;
pub mod bytes;
pub mod error;
pub mod function;
pub mod lang;
pub mod logger;
pub mod math;
pub mod number_utils;
pub mod object_utils;
pub mod regexp;
pub mod string;
pub mod text;
