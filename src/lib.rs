//! Compact, hand-transcribable identifiers of eight base-32 symbols, one type per kind of
//! entity, all sharing one validated codec.

pub mod ids;
