//! Reading relic records off an inventory screen: region geometry, text
//! normalisation, the slot / stat / set grammars, name resolution and the
//! duplicate-based capture loop.

pub mod capture;
pub mod names;
pub mod number;
pub mod ocr;
pub mod parser;
pub mod raster;
pub mod region;
pub mod relic;
pub mod text;
