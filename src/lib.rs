//! Client library for the Alibaba international open platform: request
//! signing, URL assembly, OAuth redirect, token caching and response
//! normalisation for the product, category, photobank and country endpoints.

pub mod constants;
pub mod params;
pub mod sign;
pub mod client;
pub mod model;
pub mod product_category;
pub mod product_country;
pub mod product_group;
pub mod requests;
pub mod token;
