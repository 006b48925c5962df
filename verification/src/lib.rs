//! A front end and evaluator for a small expression language.
//!
//! * [`scanner`] turns source text into tokens ([`token`]).
//! * [`parser`] turns tokens into statements ([`expr`]) by recursive
//!   descent.
//! * [`interpreter`] runs statements against a variable environment
//!   ([`environment`]).
//! * [`printer`] and [`diagnostics`] give the text of expressions and of
//!   error reports.
//!
//! Every function is verified against a contract stated over the
//! mathematical views of the data: what scanning, parsing and evaluating
//! mean is written down once as specification functions, and the code is
//! proved to compute exactly that.
//!
//! A number of the language is a double, which this library holds as its
//! 64-bit pattern ([`number`]). It compares and negates numbers itself and
//! leaves what needs rounding to its host: see [`interpreter`].

pub mod diagnostics;
pub mod environment;
pub mod expr;
pub mod interpreter;
pub mod number;
pub mod parser;
pub mod printer;
pub mod scanner;
pub mod text;
pub mod token;
